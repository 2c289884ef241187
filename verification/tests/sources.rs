use arazzo_runtime::builder::{find_workflow, load_document_source, load_sources, SourceRead};
use arazzo_runtime::documents::{
    base_uri, document_self_uri, is_relative_document_source, join_path, local_source_uris,
    relative_openapi_source_paths, remove_dot_segments, Binding, DocumentSet, FileRead, PathPart,
    ProvidedDocument,
};
use arazzo_runtime::error::RuntimeErrorKind;
use arazzo_runtime::model::{SourceDescription, SourceType, Workflow};
use arazzo_runtime::openapi::{load_source_document, operation_method, parse_openapi_into_index};
use arazzo_runtime::operations::{OperationIndex, OperationMatch, OperationOrigin};
use arazzo_runtime::routing::{operation_index, OperationIdTarget, RequestIndex};
use arazzo_runtime::web_url::relative_reference;

const PETS: &str = r#"
openapi: 3.0.0
servers:
  - url: https://{region}.pets.test/v1
    variables:
      region:
        default: eu
paths:
  /pets:
    get:
      operationId: listPets
    post:
      operationId: addPet
      servers:
        - url: https://write.pets.test
  /inner:
    servers:
      - url: /relative
    get:
      operationId: inner
"#;

const SHOPS: &str = r#"
servers:
  - url: https://shops.test
paths:
  /shops:
    get:
      operationId: listShops
  /pets:
    get:
      operationId: listPets
"#;

fn source(name: &str, url: &str) -> SourceDescription {
    SourceDescription { name: name.to_string(), url: url.to_string(), type_: SourceType::OpenApi }
}

fn read(path: &str, text: &str) -> SourceRead {
    SourceRead::Read { path: path.to_string(), data: text.as_bytes().to_vec() }
}

fn loaded(
    sources: Vec<SourceDescription>,
    reads: Vec<SourceRead>,
    specs: Vec<(usize, Vec<u8>)>,
) -> (RequestIndex, OperationIndex, Vec<String>) {
    match load_sources(sources, &reads, specs) {
        Ok(parts) => parts,
        Err(err) => panic!("loading sources: {}", err.message),
    }
}

fn qualified(source_name: &str, operation_id: &str) -> OperationIdTarget {
    OperationIdTarget::SourceQualified {
        source_name: source_name.to_string(),
        operation_id: operation_id.to_string(),
    }
}

fn bare(operation_id: &str) -> OperationIdTarget {
    OperationIdTarget::Bare(operation_id.to_string())
}

#[test]
fn the_request_base_is_the_first_server_with_its_defaults() {
    let mut index = OperationIndex::new();
    let mut warnings = Vec::new();
    let base =
        load_source_document("pets", "pets.yaml", PETS.as_bytes(), &mut index, &mut warnings);
    match base {
        Ok(base) => assert_eq!(base, "https://eu.pets.test/v1"),
        Err(err) => panic!("{}", err.message),
    }
    match index.in_source("pets", "listPets") {
        OperationMatch::One(entry) => {
            assert_eq!(entry.method, "GET");
            assert_eq!(entry.path, "/pets");
        }
        other => panic!("expected one operation, got {other:?}"),
    }
    assert!(matches!(index.in_source("other", "listPets"), OperationMatch::Missing));
}

#[test]
fn documents_without_an_absolute_server_are_refused() {
    let mut index = OperationIndex::new();
    let mut warnings = Vec::new();
    let relative = "servers:\n  - url: /api\npaths: {}\n";
    match load_source_document("s", "s.yaml", relative.as_bytes(), &mut index, &mut warnings) {
        Ok(base) => panic!("expected a refusal, got {base}"),
        Err(err) => assert_eq!(
            err.message,
            "sourceDescription \"s\": server URL \"/api\" in OpenAPI document \"s.yaml\" is relative; an absolute URL is required to derive the request base"
        ),
    }
    match load_source_document("s", "s.yaml", b"paths: {}\n", &mut index, &mut warnings) {
        Ok(base) => panic!("expected a refusal, got {base}"),
        Err(err) => assert!(err.message.contains("declares no servers[0].url")),
    }
    match load_source_document("s", "s.yaml", b"a: [", &mut index, &mut warnings) {
        Ok(base) => panic!("expected a refusal, got {base}"),
        Err(err) => assert!(err
            .message
            .starts_with("sourceDescription \"s\": parsing OpenAPI document \"s.yaml\": ")),
    }
}

#[test]
fn every_http_verb_is_an_operation_key() {
    for (key, method) in [
        ("get", "GET"),
        ("post", "POST"),
        ("put", "PUT"),
        ("patch", "PATCH"),
        ("delete", "DELETE"),
        ("head", "HEAD"),
        ("options", "OPTIONS"),
        ("trace", "TRACE"),
        ("GeT", "GET"),
    ] {
        assert_eq!(operation_method(key), Some(method));
    }
    assert_eq!(operation_method("servers"), None);
    assert_eq!(operation_method("parameters"), None);
}

#[test]
fn a_qualified_id_reaches_its_own_source() {
    let (index, operations, warnings) = loaded(
        vec![source("pets", "./pets.yaml"), source("shops", "./shops.yaml")],
        vec![read("pets.yaml", PETS), read("shops.yaml", SHOPS)],
        Vec::new(),
    );
    assert!(warnings.is_empty());
    assert_eq!(index.base_url, "https://eu.pets.test/v1");
    let operations = Ok(operations);

    let target = "$sourceDescriptions.shops.listPets";
    match index.resolve_operation_target(&operations, target, &qualified("shops", "listPets")) {
        Ok(found) => {
            assert_eq!(found.method, "GET");
            assert_eq!(found.path, "/pets");
            assert_eq!(found.base, Some("https://shops.test".to_string()));
        }
        Err(err) => panic!("{}", err.message),
    }
    let target = "$sourceDescriptions.pets.addPet";
    match index.resolve_operation_target(&operations, target, &qualified("pets", "addPet")) {
        Ok(found) => assert_eq!(found.base, Some("https://write.pets.test".to_string())),
        Err(err) => panic!("{}", err.message),
    }
}

#[test]
fn an_unqualified_id_among_several_sources_is_refused() {
    let (index, operations, _) = loaded(
        vec![source("pets", "./pets.yaml"), source("shops", "./shops.yaml")],
        vec![read("pets.yaml", PETS), read("shops.yaml", SHOPS)],
        Vec::new(),
    );
    let operations = Ok(operations);
    match index.resolve_operation_target(&operations, "listShops", &bare("listShops")) {
        Ok(found) => panic!("expected a refusal, got {found:?}"),
        Err(err) => assert_eq!(
            err.message,
            "operationId \"listShops\" is unqualified, but 2 non-arazzo sourceDescriptions are defined (pets, shops); name the source with \"$sourceDescriptions.<name>.listShops\", or address the operation by path with an operationPath of \"{<name>}./<path>\""
        ),
    }
}

#[test]
fn each_way_an_id_fails_has_its_error() {
    let mut listed = source("flows", "./flows.yaml");
    listed.type_ = SourceType::Arazzo;
    let (index, operations, _) =
        loaded(vec![source("pets", "./pets.yaml"), listed], vec![read("pets.yaml", PETS)], Vec::new());
    let operations = Ok(operations);

    let failed = |target: &str, form: &OperationIdTarget| {
        match index.resolve_operation_target(&operations, target, form) {
            Ok(found) => panic!("expected an error, got {found:?}"),
            Err(err) => err,
        }
    };
    let unknown = failed("$sourceDescriptions.none.x", &qualified("none", "x"));
    assert_eq!(unknown.kind, RuntimeErrorKind::SourceDescriptionNotFound);
    let missing = failed("$sourceDescriptions.pets.none", &qualified("pets", "none"));
    assert_eq!(missing.kind, RuntimeErrorKind::OperationIdNotFound);
    assert_eq!(
        missing.message,
        "operationId \"none\" was not found in sourceDescription \"pets\", named by \"$sourceDescriptions.pets.none\""
    );
    let flow = failed("$sourceDescriptions.flows.x", &qualified("flows", "x"));
    assert!(flow.message.contains("an arazzo source describes workflows"), "{}", flow.message);
    let none = failed("none", &bare("none"));
    assert_eq!(none.message, "operationId \"none\" not found in loaded OpenAPI specs");
    let inner = failed("inner", &bare("inner"));
    assert!(inner.message.contains("Path Item Object"), "{}", inner.message);
    let malformed = failed(
        "$x.y",
        &OperationIdTarget::Malformed {
            reason: "names no source".to_string(),
            supported: "a plain id".to_string(),
        },
    );
    assert_eq!(
        malformed.message,
        "operationId \"$x.y\" names no source; supported forms are a plain id"
    );
}

#[test]
fn a_provided_document_overrides_and_two_of_a_kind_are_ambiguous() {
    let (index, source_ops, _) = loaded(
        vec![source("pets", "./pets.yaml")],
        vec![read("pets.yaml", PETS)],
        vec![(1, SHOPS.as_bytes().to_vec())],
    );
    let (operations, notes) = match operation_index(source_ops, &index.explicit_specs) {
        Ok(parts) => parts,
        Err(err) => panic!("{}", err.message),
    };
    assert_eq!(
        notes,
        vec!["operationId \"listPets\" from sourceDescription \"pets\" (pets.yaml) is overridden by explicitly provided OpenAPI spec #1".to_string()]
    );
    match operations.bare("listPets") {
        OperationMatch::One(entry) => {
            assert_eq!(entry.origin.describe(), "explicitly provided OpenAPI spec #1")
        }
        other => panic!("expected the provided one, got {other:?}"),
    }

    let mut twice = OperationIndex::new();
    let mut warnings = Vec::new();
    for ordinal in [1, 2] {
        let origin = OperationOrigin::ExplicitSpec { ordinal };
        if let Err(err) =
            parse_openapi_into_index(SHOPS.as_bytes(), &origin, &mut twice, &mut warnings)
        {
            panic!("{}", err.message);
        }
    }
    assert!(matches!(twice.bare("listShops"), OperationMatch::Ambiguous(_)));
    let operations = Ok(twice);
    match index.resolve_operation_id(&operations, "listShops", &bare("listShops")) {
        Ok(found) => panic!("expected ambiguity, got {found:?}"),
        Err(err) => assert!(err.message.contains("it does not name one operation")),
    }
}

#[test]
fn sources_that_cannot_be_read_are_reported() {
    let sd = source("pets", "./pets.yaml");
    let mut ops = OperationIndex::new();
    let mut warnings = Vec::new();
    match load_document_source(&sd, &SourceRead::NoDirectory, &mut ops, &mut warnings) {
        Ok(base) => panic!("expected an error, got {base}"),
        Err(err) => assert!(err.message.contains("requires the Arazzo document's directory")),
    }
    let unreadable = SourceRead::Unreadable {
        path: "/a/pets.yaml".to_string(),
        reason: "no such file".to_string(),
    };
    match load_document_source(&sd, &unreadable, &mut ops, &mut warnings) {
        Ok(base) => panic!("expected an error, got {base}"),
        Err(err) => assert_eq!(
            err.message,
            "sourceDescription \"pets\": reading OpenAPI document \"/a/pets.yaml\": no such file"
        ),
    }
}

#[test]
fn a_url_source_is_its_own_base() {
    let (index, _, _) = loaded(vec![source("api", "https://api.test/v2")], Vec::new(), Vec::new());
    assert_eq!(index.base_url, "https://api.test/v2");
    assert_eq!(index.source_bases.get("api"), Some(&"https://api.test/v2".to_string()));
}

#[test]
fn workflows_are_found_by_their_id() {
    let list = vec![
        Workflow { workflow_id: "a".to_string(), ..Workflow::default() },
        Workflow { workflow_id: "b".to_string(), ..Workflow::default() },
    ];
    assert_eq!(find_workflow(&list, "b"), Some(1));
    assert_eq!(find_workflow(&list, "c"), None);
}

#[test]
fn relative_sources_are_told_from_urls() {
    assert!(is_relative_document_source(&source("a", "./a.yaml")));
    assert!(is_relative_document_source(&source("a", "a.yaml")));
    assert!(!is_relative_document_source(&source("a", "https://a.test/a.yaml")));
    let mut flow = source("a", "./a.yaml");
    flow.type_ = SourceType::Arazzo;
    assert!(!is_relative_document_source(&flow));
    assert!(relative_reference("a/b"));
    assert!(!relative_reference("mailto:x@y.test"));

    assert_eq!(
        relative_openapi_source_paths(
            &vec![source("a", "a.yaml"), source("b", "https://b.test")],
            "/docs"
        ),
        vec![("a".to_string(), "/docs/a.yaml".to_string())]
    );
    assert_eq!(join_path("/docs/", "a"), "/docs/a");
    assert_eq!(join_path("/docs", "/a"), "/a");
    assert_eq!(join_path("", "a"), "a");
}

#[test]
fn dot_segments_are_removed() {
    let normal = |s: &str| PathPart::Normal(s.to_string());
    let parts = vec![
        PathPart::Root,
        normal("a"),
        PathPart::Current,
        normal("b"),
        PathPart::Parent,
        normal("c"),
    ];
    assert_eq!(remove_dot_segments(&parts), vec![PathPart::Root, normal("a"), normal("c")]);
    let plain = vec![PathPart::Root, normal("a"), normal("b")];
    assert_eq!(remove_dot_segments(&plain), vec![PathPart::Root, normal("a"), normal("b")]);
}

fn uri(text: &str) -> url::Url {
    match url::Url::parse(text) {
        Ok(uri) => uri,
        Err(err) => panic!("{text}: {err}"),
    }
}

#[test]
fn a_document_says_where_it_is() {
    assert_eq!(
        document_self_uri(b"$self: https://a.test/doc.yaml\n"),
        Some("https://a.test/doc.yaml".to_string())
    );
    assert_eq!(document_self_uri(b"openapi: 3.1.0\n"), None);
    assert_eq!(document_self_uri(b"a: ["), None);
    let based = base_uri(Some("../x/y.yaml"), Some(uri("https://a.test/p/q.yaml")));
    assert_eq!(based.map(|u| u.to_string()), Some("https://a.test/x/y.yaml".to_string()));
    assert_eq!(base_uri(Some("rel"), None), None);
    let kept = base_uri(None, Some(uri("https://a.test/q#part")));
    assert_eq!(kept.map(|u| u.to_string()), Some("https://a.test/q#part".to_string()));
}

#[test]
fn a_provided_document_is_bound_by_its_identity() {
    let provided = vec![
        ProvidedDocument {
            data: b"$self: https://a.test/pets.yaml\n".to_vec(),
            retrieval_uri: None,
        },
        ProvidedDocument { data: SHOPS.as_bytes().to_vec(), retrieval_uri: None },
    ];
    let mut set = DocumentSet::new(Some("https://a.test/flows.yaml"), None, provided);
    match set.bind(&source("pets", "pets.yaml")) {
        Ok(Binding::Provided(bound)) => {
            assert_eq!(bound.data, b"$self: https://a.test/pets.yaml\n".to_vec())
        }
        Ok(other) => panic!("expected the provided document, got {other:?}"),
        Err(err) => panic!("{}", err.message),
    }
    // The other one is left to answer for itself.
    assert_eq!(set.unclaimed(), vec![(2, SHOPS.as_bytes().to_vec())]);
}

#[test]
fn documents_that_cannot_be_bound_are_refused() {
    let mut set = DocumentSet::new(None, None, Vec::new());
    match set.bind(&source("pets", "pets.yaml")) {
        Ok(bound) => panic!("expected an error, got {bound:?}"),
        Err(err) => assert!(
            err.message.starts_with(
                "sourceDescription \"pets\": relative url \"pets.yaml\" has no base URI"
            ),
            "{}",
            err.message
        ),
    }
    match set.bind(&source("api", "https://api.test")) {
        Ok(Binding::BaseUrl) => {}
        Ok(other) => panic!("expected a base URL, got {other:?}"),
        Err(err) => panic!("{}", err.message),
    }

    let mut filed = DocumentSet::new(None, Some(uri("file:///docs/flows.yaml")), Vec::new());
    let sd = source("pets", "pets.yaml");
    let at = match filed.bind(&sd) {
        Ok(Binding::File(at)) => at.to_string(),
        Ok(other) => panic!("expected a file, got {other:?}"),
        Err(err) => panic!("{}", err.message),
    };
    assert_eq!(at, "file:///docs/pets.yaml");
    match filed.bind_file(&sd, &at, FileRead::NotAPath) {
        Ok(bound) => panic!("expected an error, got {bound:?}"),
        Err(err) => assert!(err.message.ends_with("which is not a usable local file path")),
    }
    let failed =
        FileRead::Unreadable { path: "/docs/pets.yaml".to_string(), reason: "gone".to_string() };
    match filed.bind_file(&sd, &at, failed) {
        Ok(bound) => panic!("expected an error, got {bound:?}"),
        Err(err) => assert!(
            err.message.ends_with("; reading OpenAPI document \"/docs/pets.yaml\": gone")
        ),
    }
    let got = FileRead::Read { path: "/docs/pets.yaml".to_string(), data: b"x".to_vec() };
    match filed.bind_file(&sd, &at, got) {
        Ok(bound) => assert_eq!(bound.data, b"x".to_vec()),
        Err(err) => panic!("{}", err.message),
    }
    assert_eq!(
        local_source_uris(
            None,
            Some(uri("file:///docs/flows.yaml")),
            &vec![source("pets", "pets.yaml"), source("api", "https://api.test")]
        )
        .into_iter()
        .map(|(name, at)| (name, at.to_string()))
        .collect::<Vec<_>>(),
        vec![
            ("pets".to_string(), "file:///docs/pets.yaml".to_string()),
            ("api".to_string(), "https://api.test/".to_string()),
        ]
    );
}
